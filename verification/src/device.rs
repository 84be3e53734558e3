//! Everything about a single device.

use crate::config::Config;
use crate::device::fota::DataDownload;
use crate::device::fota::FirmwareUploadState;
use crate::lsdl::RadioMode;
use crate::lwm2m::FirmwareUpdateState;
use crate::net::IpAddr;
use crate::net::SocketAddr;
use crate::net::SocketAddrV4;
use crate::net::SocketAddrV6;
use crate::storage::description::ConnectionStatus;
use crate::storage::description::DeviceDescription;
use crate::storage::persistent::PersistentState;
use crate::storage::value::Value;
use crate::storage::value::ValueDescription;
use crate::time::Nanos;
use crate::traits;
use crate::traits::DS_LOCAL_USE;
use crate::traits::DS_USE_NETWORK_KEY;
use crate::traits::Ds;
use crate::traits::Flowinfo;
use crate::traits::TrafficClass;
use vstd::prelude::*;

pub mod container;
pub mod fota;
pub mod inclusion;
pub mod lemonbeat_communication;
pub mod lemonbeat_requests;
pub mod lifecycle;
pub mod loadsave;
pub mod lwm2m_utils;
pub mod object_connectionstatus;
pub mod object_datadownload;
pub mod object_device;
pub mod object_firmwareupdate;
pub mod object_lemonbeat;
pub mod object_lemonbeat_status_message;
pub mod values;

verus! {

/// A device may go to sleep right away.
pub const GOTO_SLEEP_IMMEDIATELY: u128 = 0;

/// How long a device is told to stay awake while it is being included.
pub const GOTO_SLEEP_DURATION: u128 = 20_000_000_000;

/// What is known outside about a device.
#[derive(Clone, Copy, Debug, PartialEq, Eq, Structural)]
pub enum PublicationState {
    /// It was never announced.
    Invisible,
    /// It was announced as one that can be included.
    Includable,
    /// It was announced as a whole and is ready for use.
    Ready,
}

/// Where a device comes from.
#[derive(Clone, Copy, Debug, PartialEq, Eq, Structural)]
pub enum NewDeviceSource {
    /// It was heard of on the radio.
    Air,
    /// It was loaded from disk.
    Storage,
}

/// Everything that is known of a device.
///
/// The times in `description`, `persistent`, `values` and `data_download` are
/// stored or shown: they are those of the clock on the wall and count from the
/// epoch. All others, those in `upload_state` among them, are only compared with
/// each other: they are those of a clock that is never set.
#[derive(Debug)]
pub struct Device {
    /// The address of the interface that the device is reached through.
    pub interface: SocketAddr,
    /// The last device description.
    pub description: DeviceDescription,
    pub persistent: PersistentState,
    pub value_descriptions: Vec<ValueDescription>,
    /// One value for each description.
    pub values: Vec<Value>,
    /// A device that is not included is kept at least until then.
    pub dont_delete_until: Nanos,
    /// Until when the device is awake. It may well be longer.
    pub awake_until: Option<Nanos>,
    /// When the device was last talked to, whether it answered or not.
    pub last_communication_attempt: Option<Nanos>,
    /// When the device last went on- or offline.
    pub online_changed_at: Nanos,
    /// When a value was last written.
    pub last_write: Option<Nanos>,
    pub last_rf_link_quality_publish: Option<Nanos>,
    /// Whether the clock of the device is off.
    pub time_out_of_sync: bool,
    pub upload_state: Option<FirmwareUploadState>,
    pub data_download: DataDownload,
    pub publication_state: PublicationState,
}

/// The differentiated services flags for a message, with the encryption flag
/// only where it is to be encrypted.
pub open spec fn message_ds(encrypt: bool) -> u8 {
    if encrypt {
        7
    } else {
        3
    }
}

/// Flow information with just the encryption flag set, on a machine of a given
/// byte order.
pub fn make_flowinfo_ordered(encrypt: bool, order: traits::ByteOrder) -> (res: Flowinfo)
    ensures
        res.spec_raw() == traits::flowinfo_of((4 * message_ds(encrypt)) as u8, order),
{
    let bits: u8 = if encrypt {
        DS_LOCAL_USE | DS_USE_NETWORK_KEY
    } else {
        DS_LOCAL_USE
    };
    assert(3u8 | 4u8 == 7u8) by (bit_vector);
    let class: TrafficClass = match Ds::from_bits(bits) {
        Some(ds) => TrafficClass::new(ds),
        None => TrafficClass::from_raw(0),
    };
    Flowinfo::new_ordered(class, order)
}

/// Flow information with just the encryption flag set.
pub fn make_flowinfo(encrypt: bool) -> (res: Flowinfo)
    ensures
        exists|order: traits::ByteOrder|
            res.spec_raw() == #[trigger] traits::flowinfo_of((4 * message_ds(encrypt)) as u8, order),
{
    let order = crate::traits::native_byte_order();
    make_flowinfo_ordered(encrypt, order)
}

/// What is sent encrypted is received as encrypted, and nothing else is.
pub proof fn law_flowinfo_tells_encryption(encrypt: bool, order: traits::ByteOrder)
    ensures
        0 <= traits::flowinfo_of((4 * message_ds(encrypt)) as u8, order) <= u32::MAX,
        traits::marks_encrypted(traits::flowinfo_of((4 * message_ds(encrypt)) as u8, order) as u32, order)
            == encrypt,
{
    traits::law_flowinfo_round_trip((4 * message_ds(encrypt)) as u8, order);
    assert(7u8 & 3u8 == 3u8) by (bit_vector);
    assert(7u8 & 4u8 == 4u8) by (bit_vector);
    assert(3u8 & 4u8 != 4u8) by (bit_vector);
}

impl Device {
    /// A device that was heard of, or loaded, at `now`, when the clock on the
    /// wall shows `wall_clock`. A device without a stored state starts as online
    /// if it was heard of and as offline if it was loaded. An upload or update
    /// that was cut short does not keep it from being updated.
    pub fn new(
        interface: SocketAddr,
        description: DeviceDescription,
        persistent: Option<PersistentState>,
        source: NewDeviceSource,
        now: Nanos,
        wall_clock: Nanos,
        max_unincluded: Nanos,
    ) -> (res: Self)
        requires
            now + max_unincluded <= u128::MAX,
        ensures
            res.interface == interface,
            res.description == description,
            match persistent {
                Some(persistent) => res.persistent == (if persistent.is_stale(
                    description.included,
                ) {
                    PersistentState {
                        firmware_update_state: FirmwareUpdateState::Idle,
                        ..persistent
                    }
                } else {
                    persistent
                }),
                None => res.persistent.is_fresh(
                    match source {
                        NewDeviceSource::Air => ConnectionStatus::Online,
                        NewDeviceSource::Storage => ConnectionStatus::Offline,
                    },
                    wall_clock,
                ),
            },
            !res.persistent.is_stale(description.included),
            res.value_descriptions@ == Seq::<ValueDescription>::empty(),
            res.values@ == Seq::<Value>::empty(),
            res.dont_delete_until == now + max_unincluded,
            res.awake_until is None,
            res.last_communication_attempt == (match source {
                NewDeviceSource::Air => Some(now),
                NewDeviceSource::Storage => None,
            }),
            res.online_changed_at == now,
            res.last_write is None,
            res.last_rf_link_quality_publish is None,
            !res.time_out_of_sync,
            res.upload_state is None,
            res.data_download == fota::default_download(),
            res.publication_state == PublicationState::Invisible,
    {
        let mut persistent = match persistent {
            Some(persistent) => persistent,
            None => PersistentState::new(
                match source {
                    NewDeviceSource::Air => ConnectionStatus::Online,
                    NewDeviceSource::Storage => ConnectionStatus::Offline,
                },
                wall_clock,
            ),
        };
        persistent.reset_stale_update(description.included);
        Self {
            interface,
            description,
            persistent,
            value_descriptions: Vec::new(),
            values: Vec::new(),
            dont_delete_until: now + max_unincluded,
            awake_until: None,
            last_communication_attempt: match source {
                NewDeviceSource::Air => Some(now),
                NewDeviceSource::Storage => None,
            },
            online_changed_at: now,
            last_write: None,
            last_rf_link_quality_publish: None,
            time_out_of_sync: false,
            upload_state: None,
            data_download: DataDownload::new(),
            publication_state: PublicationState::Invisible,
        }
    }

    pub open spec fn spec_filter_go_to_sleep(
        self,
        value: Option<Nanos>,
        config: Config,
    ) -> Option<Nanos> {
        if self.description.radio_mode == RadioMode::AlwaysOnline {
            None
        } else if value == Some(config.gotosleep_duration_fota) {
            value
        } else if self.persistent.firmware_update_state == FirmwareUpdateState::Downloading {
            None
        } else {
            value
        }
    }

    /// How long a device is told to stay awake with a message, if at all. A
    /// device that never sleeps is not told anything, and during an upload only
    /// the upload itself decides.
    pub fn filter_go_to_sleep(&self, value: Option<Nanos>, config: &Config) -> (res: Option<Nanos>)
        ensures
            res == self.spec_filter_go_to_sleep(value, *config),
    {
        if self.description.radio_mode == RadioMode::AlwaysOnline {
            return None;
        }
        match value {
            None => None,
            Some(duration) => {
                if duration == config.gotosleep_duration_fota {
                    Some(duration)
                } else if self.persistent.firmware_update_state
                    == FirmwareUpdateState::Downloading {
                    None
                } else {
                    Some(duration)
                }
            },
        }
    }

    /// The interface's socket address with the address of the device. An
    /// address of another version brings no flow information of its own.
    pub open spec fn spec_address(self) -> SocketAddr {
        match (self.interface, self.description.address) {
            (SocketAddr::V4(interface), IpAddr::V4(ip)) => SocketAddr::V4(
                SocketAddrV4 { ip, ..interface },
            ),
            (SocketAddr::V6(interface), IpAddr::V6(ip)) => SocketAddr::V6(
                SocketAddrV6 { ip, ..interface },
            ),
            (SocketAddr::V6(interface), IpAddr::V4(ip)) => SocketAddr::V4(
                SocketAddrV4 { ip, port: interface.port },
            ),
            (SocketAddr::V4(interface), IpAddr::V6(ip)) => SocketAddr::V6(
                SocketAddrV6 { ip, port: interface.port, flowinfo: 0, scope_id: 0 },
            ),
        }
    }

    /// Where messages to the device are sent.
    pub fn address(&self) -> (res: SocketAddr)
        ensures
            res == self.spec_address(),
    {
        match (self.interface, self.description.address) {
            (SocketAddr::V4(interface), IpAddr::V4(ip)) => SocketAddr::V4(
                SocketAddrV4 { ip, ..interface },
            ),
            (SocketAddr::V6(interface), IpAddr::V6(ip)) => SocketAddr::V6(
                SocketAddrV6 { ip, ..interface },
            ),
            (SocketAddr::V6(interface), IpAddr::V4(ip)) => SocketAddr::V4(
                SocketAddrV4 { ip, port: interface.port },
            ),
            (SocketAddr::V4(interface), IpAddr::V6(ip)) => SocketAddr::V6(
                SocketAddrV6 { ip, port: interface.port, flowinfo: 0, scope_id: 0 },
            ),
        }
    }

    /// Whether changes of this device are published.
    pub open spec fn spec_is_published(self) -> bool {
        self.description.included && self.publication_state == PublicationState::Ready
    }

    pub fn is_published(&self) -> (res: bool)
        ensures
            res == self.spec_is_published(),
    {
        self.description.included && self.publication_state == PublicationState::Ready
    }
}

/// Messages are for local use, and the flag for the network key is all that
/// encryption adds.
pub proof fn law_flags_of_a_message(encrypt: bool)
    ensures
        message_ds(encrypt) == DS_LOCAL_USE + (if encrypt {
            DS_USE_NETWORK_KEY as int
        } else {
            0
        }),
        DS_LOCAL_USE == 3,
        DS_USE_NETWORK_KEY == 4,
{
}

/// How long a device is told to stay awake: a device that is always online never
/// is told, and any other one always the time that it should, but for the time of
/// an upload. Then only the time for uploads is let through.
pub proof fn law_time_to_stay_awake(device: Device, value: Option<Nanos>, config: Config)
    ensures
        device.description.radio_mode == RadioMode::AlwaysOnline
            ==> device.spec_filter_go_to_sleep(value, config) is None,
        device.description.radio_mode != RadioMode::AlwaysOnline
            && device.persistent.firmware_update_state != FirmwareUpdateState::Downloading
            ==> device.spec_filter_go_to_sleep(value, config) == value,
        device.description.radio_mode != RadioMode::AlwaysOnline
            && device.persistent.firmware_update_state == FirmwareUpdateState::Downloading
            ==> match value {
            Some(time) => if time == config.gotosleep_duration_fota {
                device.spec_filter_go_to_sleep(value, config) == value
            } else {
                device.spec_filter_go_to_sleep(value, config) is None
            },
            None => device.spec_filter_go_to_sleep(value, config) is None,
        },
{
}

/// A device is reached under its own IP address and the port of the interface.
/// The rest of the interface's address is kept where it is of the same version.
pub proof fn law_where_a_device_is_reached(device: Device)
    ensures
        device.spec_address().spec_ip() == device.description.address,
        device.spec_address().spec_port() == device.interface.spec_port(),
        device.description.address is V6 ==> {
            &&& device.spec_address() matches SocketAddr::V6(addr)
            &&& device.interface matches SocketAddr::V6(interface) ==> addr.flowinfo
                == interface.flowinfo && addr.scope_id == interface.scope_id
            &&& device.interface is V4 ==> addr.flowinfo == 0 && addr.scope_id == 0
        },
{
}

/// A device is published once it is included and everything of it is there.
pub proof fn law_who_is_published(device: Device)
    ensures
        device.spec_is_published() ==> device.description.included,
        device.description.included ==> match device.publication_state {
            PublicationState::Ready => device.spec_is_published(),
            _ => !device.spec_is_published(),
        },
{
}

} // verus!
